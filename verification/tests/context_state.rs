use noel_editor::context::{Context, Counter, FocusCtx, TabCycle, Trigger};
use noel_editor::utils::Type;

#[test]
fn counter_hands_out_consecutive_numbers() {
    let mut c = Counter::new();
    assert_eq!(c.get(), 0);
    assert_eq!(c.get(), 1);
    assert_eq!(c.get(), 2);
}

#[test]
fn counter_new_with_starts_at_given_value() {
    let mut c = Counter::new_with(41);
    assert_eq!(c.get(), 41);
    assert_eq!(c.get(), 42);
}

#[test]
fn counter_reset_starts_over() {
    let mut c = Counter::new_with(7);
    c.get();
    c.reset();
    assert_eq!(c.get(), 0);
}

#[test]
fn counter_default_is_zero() {
    let mut c = Counter::default();
    assert_eq!(c.get(), 0);
}

#[test]
fn trigger_starts_off() {
    let t = Trigger::default();
    assert!(!*t);
    assert!(!t.is_on());
}

#[test]
fn trigger_on_off() {
    let mut t = Trigger::default();
    t.on();
    assert!(*t);
    t.off();
    assert!(!*t);
}

#[test]
fn trigger_run_fires_once() {
    let mut t = Trigger::default();
    let mut calls = 0;
    t.on();
    assert!(t.run(|| calls += 1));
    assert!(!t.run(|| calls += 1));
    assert_eq!(calls, 1);
    assert!(!*t);
}

#[test]
fn trigger_run_when_off_does_not_call() {
    let mut t = Trigger::default();
    let mut called = false;
    assert!(!t.run(|| called = true));
    assert!(!called);
}

#[test]
fn tab_cycle_empty_yields_nothing() {
    let mut c = TabCycle::empty();
    assert_eq!(c.next(), None);
    assert_eq!(c.next(), None);
}

#[test]
fn tab_cycle_wraps_around() {
    let mut c = TabCycle::from_vec(vec![4, 9, 2]);
    let got: Vec<Option<usize>> = (0..7).map(|_| c.next()).collect();
    assert_eq!(got, vec![Some(4), Some(9), Some(2), Some(4), Some(9), Some(2), Some(4)]);
}

#[test]
fn tab_cycle_clone_continues_from_same_place() {
    let mut c = TabCycle::from_vec(vec![1, 2]);
    c.next();
    let mut d = c.clone();
    assert_eq!(d.next(), Some(2));
    assert_eq!(c.next(), Some(2));
}

#[test]
fn focus_default_is_idle() {
    let mut f = FocusCtx::default();
    assert!(!*f.turn_next);
    assert!(!*f.edit_next);
    assert!(!*f.lost_focus_this_frame);
    assert!(!*f.edit_once);
    assert!(!*f.on_button);
    assert_eq!(f.tab_target_id.next(), None);
}

#[test]
fn context_default_is_fresh() {
    let mut ctx = Context::default();
    assert_eq!(ctx.search, "");
    assert_eq!(ctx.depth, 0);
    assert_eq!(ctx.count.get(), 0);
    assert!(!*ctx.open_popup && !*ctx.close_popup && !*ctx.inc_table && !*ctx.dec_table);
}

#[test]
fn context_descend_counts_depth() {
    let mut ctx = Context::default();
    ctx.descend();
    ctx.descend();
    assert_eq!(ctx.depth, 2);
}

#[test]
fn type_wraps_and_reads_back() {
    let t: Type<u32> = Type::from(5);
    assert_eq!(*t, 5);
    let s: Type<String> = String::from("abc").into();
    assert_eq!(s.len(), 3);
}
