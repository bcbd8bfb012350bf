//! Interaction state that outlives a frame: a counter that hands out fresh
//! numbers, one-shot triggers, the cycle of search hits that Tab walks through,
//! and the context that bundles them.
use vstd::prelude::*;

verus! {

/// A counter that hands out consecutive numbers, starting from the value it
/// was made with.
#[derive(Clone, Copy)]
pub struct Counter(usize);

impl View for Counter {
    type V = usize;

    closed spec fn view(&self) -> usize {
        self.0
    }
}

impl Counter {
    /// Hands out the current number and moves on to the next one.
    pub fn get(&mut self) -> (r: usize)
        requires
            old(self)@ < usize::MAX,
        ensures
            r == old(self)@,
            final(self)@ == old(self)@ + 1,
    {
        self.0 += 1;
        self.0 - 1
    }

    /// Starts counting from zero again.
    pub fn reset(&mut self)
        ensures
            final(self)@ == 0,
    {
        self.0 = 0;
    }

    /// A counter that starts at zero.
    pub fn new() -> (r: Self)
        ensures
            r@ == 0,
    {
        Self(0)
    }

    /// A counter that starts at `start`.
    pub fn new_with(start: usize) -> (r: Self)
        ensures
            r@ == start,
    {
        Self(start)
    }
}

/// Drawing numbers from a counter one after another, where `values[j]` is
/// the counter before the `j`-th draw and `results[j]` what that draw handed
/// out (as `get` states it): the draws hand out `start`, `start + 1`, ... in
/// increasing order, so never the same number twice, and leave the counter
/// at `start` plus the number of draws.
pub proof fn lemma_counter_draws(values: Seq<usize>, results: Seq<usize>)
    requires
        values.len() == results.len() + 1,
        forall|j: int|
            0 <= j < results.len() ==> #[trigger] results[j] == values[j] && values[j + 1]
                == values[j] + 1,
    ensures
        forall|j: int| 0 <= j < results.len() ==> #[trigger] results[j] == values[0] + j,
        values.last() == values[0] + results.len(),
        forall|i: int, j: int| 0 <= i < j < results.len() ==> results[i] < results[j],
    decreases results.len(),
{
    if results.len() > 0 {
        let n = results.len() - 1;
        lemma_counter_draws(values.drop_last(), results.drop_last());
        assert(results[n] == values[n]);
        assert(values.drop_last().last() == values[n]);
        assert forall|j: int| 0 <= j < results.len() implies #[trigger] results[j] == values[0] + j by {
            if j < n {
                assert(results.drop_last()[j] == results[j]);
            }
        }
    }
}

impl Default for Counter {
    fn default() -> (r: Self)
        ensures
            r@ == 0,
    {
        Self(0)
    }
}

/// A one-shot flag: set it with `on`, and `run` fires once and clears it.
#[derive(Clone, Copy)]
pub struct Trigger {
    set: bool,
}

impl View for Trigger {
    type V = bool;

    closed spec fn view(&self) -> bool {
        self.set
    }
}

impl core::ops::Deref for Trigger {
    type Target = bool;

    fn deref(&self) -> (r: &bool)
        ensures
            *r == self@,
    {
        &self.set
    }
}

impl Default for Trigger {
    fn default() -> (r: Self)
        ensures
            !r@,
    {
        Trigger { set: false }
    }
}

impl Trigger {
    /// Arms the trigger.
    pub fn on(&mut self)
        ensures
            final(self)@,
    {
        self.set = true;
    }

    /// Disarms the trigger.
    pub fn off(&mut self)
        ensures
            !final(self)@,
    {
        self.set = false;
    }

    /// Whether the trigger is armed.
    pub fn is_on(&self) -> (r: bool)
        ensures
            r == self@,
    {
        self.set
    }

    /// When the trigger is armed, calls `f` once and disarms it. Returns
    /// whether it fired (and so whether `f` was called); the trigger is
    /// disarmed afterwards either way.
    pub fn run<F: FnOnce()>(&mut self, f: F) -> (fired: bool)
        requires
            old(self)@ ==> f.requires(()),
        ensures
            fired == old(self)@,
            fired ==> f.ensures((), ()),
            !final(self)@,
    {
        if self.set {
            f();
            self.set = false;
            true
        } else {
            false
        }
    }
}

/// The search hits that Tab cycles through: after the last one it starts over
/// at the first; with no hits it yields nothing.
pub struct TabCycle {
    items: Vec<usize>,
    pos: usize,
}

/// The position that follows `pos` in a cycle over `len` items.
pub open spec fn cycle_step(pos: nat, len: nat) -> nat {
    if len == 0 {
        0
    } else {
        (pos + 1) % len
    }
}

/// The position reached after `k` steps from `pos` in a cycle over `len`
/// items.
pub open spec fn cycle_advance(pos: nat, len: nat, k: nat) -> nat
    decreases k,
{
    if k == 0 {
        pos
    } else {
        cycle_step(cycle_advance(pos, len, (k - 1) as nat), len)
    }
}

impl Clone for TabCycle {
    fn clone(&self) -> (r: Self)
        ensures
            r.items() == self.items(),
            r.position() == self.position(),
    {
        proof {
            use_type_invariant(self);
        }
        let mut items: Vec<usize> = Vec::new();
        let mut i: usize = 0;
        while i < self.items.len()
            invariant
                i <= self.items@.len(),
                items@ == self.items@.take(i as int),
            decreases self.items@.len() - i,
        {
            items.push(self.items[i]);
            i = i + 1;
            assert(items@ =~= self.items@.take(i as int));
        }
        assert(self.items@.take(i as int) =~= self.items@);
        TabCycle { items, pos: self.pos }
    }
}

impl TabCycle {
    #[verifier::type_invariant]
    spec fn inv(self) -> bool {
        if self.items@.len() == 0 {
            self.pos == 0
        } else {
            self.pos < self.items@.len()
        }
    }

    /// The hits, in the order in which they come round.
    pub closed spec fn items(&self) -> Seq<usize> {
        self.items@
    }

    /// The index of the hit that comes next.
    pub closed spec fn position(&self) -> nat {
        self.pos as nat
    }

    /// A cycle with no hits.
    pub fn empty() -> (r: Self)
        ensures
            r.items() == Seq::<usize>::empty(),
            r.position() == 0,
    {
        TabCycle { items: Vec::new(), pos: 0 }
    }

    /// A cycle over `items`, starting at the first.
    pub fn from_vec(items: Vec<usize>) -> (r: Self)
        ensures
            r.items() == items@,
            r.position() == 0,
    {
        TabCycle { items, pos: 0 }
    }

    /// The hit at the current position, moving on to the next one (after the
    /// last comes the first again); `None` when there are no hits.
    pub fn next(&mut self) -> (r: Option<usize>)
        ensures
            final(self).items() == old(self).items(),
            old(self).items().len() == 0 ==> r is None && final(self).position() == 0,
            old(self).items().len() > 0 ==> {
                &&& old(self).position() < old(self).items().len()
                &&& r == Some(old(self).items()[old(self).position() as int])
                &&& final(self).position() == cycle_step(
                    old(self).position(),
                    old(self).items().len(),
                )
            },
    {
        proof {
            use_type_invariant(&*self);
        }
        if self.items.len() == 0 {
            None
        } else {
            let r = self.items[self.pos];
            let next = if self.pos + 1 == self.items.len() {
                proof {
                    vstd::arithmetic::div_mod::lemma_mod_self_0(self.items@.len() as int);
                }
                0
            } else {
                proof {
                    vstd::arithmetic::div_mod::lemma_small_mod(
                        (self.pos + 1) as nat,
                        self.items@.len() as nat,
                    );
                }
                self.pos + 1
            };
            self.pos = next;
            Some(r)
        }
    }
}

/// Taking `k` steps around a cycle of `len > 0` items from the first one
/// lands on item `k % len`: the hits come round again and again, in order.
pub proof fn lemma_cycle_wraps_around(len: nat, k: nat)
    requires
        len > 0,
    ensures
        cycle_advance(0, len, k) == k % len,
    decreases k,
{
    if k > 0 {
        lemma_cycle_wraps_around(len, (k - 1) as nat);
        let p = cycle_advance(0, len, (k - 1) as nat);
        assert(p == ((k - 1) as nat) % len);
        assert((p + 1) % len == k % len) by {
            vstd::arithmetic::div_mod::lemma_add_mod_noop(k - 1, 1, len as int);
            if len == 1 {
                vstd::arithmetic::div_mod::lemma_mod_self_0(1);
                assert(1int % 1int == 0);
            } else {
                vstd::arithmetic::div_mod::lemma_small_mod(1, len);
            }
        }
        assert(cycle_advance(0, len, k) == cycle_step(p, len));
    } else {
        vstd::arithmetic::div_mod::lemma_small_mod(0, len);
    }
}

/// The triggers and the Tab cycle that pass keyboard focus between widgets.
pub struct FocusCtx {
    pub turn_next: Trigger,
    pub edit_next: Trigger,
    pub lost_focus_this_frame: Trigger,
    pub edit_once: Trigger,
    pub on_button: Trigger,
    pub tab_target_id: TabCycle,
}

impl FocusCtx {
    /// No trigger is armed and the Tab cycle is empty.
    pub open spec fn is_idle(&self) -> bool {
        &&& !self.turn_next@
        &&& !self.edit_next@
        &&& !self.lost_focus_this_frame@
        &&& !self.edit_once@
        &&& !self.on_button@
        &&& self.tab_target_id.items().len() == 0
    }
}

impl Clone for FocusCtx {
    fn clone(&self) -> (r: Self)
        ensures
            r.turn_next == self.turn_next,
            r.edit_next == self.edit_next,
            r.lost_focus_this_frame == self.lost_focus_this_frame,
            r.edit_once == self.edit_once,
            r.on_button == self.on_button,
            r.tab_target_id.items() == self.tab_target_id.items(),
            r.tab_target_id.position() == self.tab_target_id.position(),
    {
        FocusCtx {
            turn_next: self.turn_next,
            edit_next: self.edit_next,
            lost_focus_this_frame: self.lost_focus_this_frame,
            edit_once: self.edit_once,
            on_button: self.on_button,
            tab_target_id: self.tab_target_id.clone(),
        }
    }
}

impl Default for FocusCtx {
    fn default() -> (r: Self)
        ensures
            r.is_idle(),
    {
        Self {
            tab_target_id: TabCycle::empty(),
            turn_next: Trigger::default(),
            edit_next: Trigger::default(),
            lost_focus_this_frame: Trigger::default(),
            edit_once: Trigger::default(),
            on_button: Trigger::default(),
        }
    }
}

/// Everything the widgets share while a frame is drawn.
pub struct Context {
    pub focus: FocusCtx,
    pub search: String,
    pub depth: usize,
    pub count: Counter,
    pub open_popup: Trigger,
    pub close_popup: Trigger,
    pub inc_table: Trigger,
    pub dec_table: Trigger,
}

impl Context {
    /// The state of a context that nothing has touched yet.
    pub open spec fn is_fresh(&self) -> bool {
        &&& self.focus.is_idle()
        &&& self.search@ == Seq::<char>::empty()
        &&& self.depth == 0
        &&& self.count@ == 0
        &&& !self.open_popup@
        &&& !self.close_popup@
        &&& !self.inc_table@
        &&& !self.dec_table@
    }

    /// Leaves the context as it is.
    fn clear(&mut self)
        ensures
            *final(self) == *old(self),
    {
    }

    /// Notes that a widget one level deeper is being drawn.
    pub fn descend(&mut self)
        requires
            old(self).depth < usize::MAX,
        ensures
            final(self).depth == old(self).depth + 1,
            final(self).focus == old(self).focus,
            final(self).search == old(self).search,
            final(self).count == old(self).count,
            final(self).open_popup == old(self).open_popup,
            final(self).close_popup == old(self).close_popup,
            final(self).inc_table == old(self).inc_table,
            final(self).dec_table == old(self).dec_table,
    {
        self.depth += 1;
    }
}

impl Clone for Context {
    fn clone(&self) -> (r: Self)
        ensures
            r.focus.turn_next == self.focus.turn_next,
            r.focus.edit_next == self.focus.edit_next,
            r.focus.lost_focus_this_frame == self.focus.lost_focus_this_frame,
            r.focus.edit_once == self.focus.edit_once,
            r.focus.on_button == self.focus.on_button,
            r.focus.tab_target_id.items() == self.focus.tab_target_id.items(),
            r.focus.tab_target_id.position() == self.focus.tab_target_id.position(),
            r.search == self.search,
            r.depth == self.depth,
            r.count == self.count,
            r.open_popup == self.open_popup,
            r.close_popup == self.close_popup,
            r.inc_table == self.inc_table,
            r.dec_table == self.dec_table,
    {
        Context {
            focus: self.focus.clone(),
            search: self.search.clone(),
            depth: self.depth,
            count: self.count,
            open_popup: self.open_popup,
            close_popup: self.close_popup,
            inc_table: self.inc_table,
            dec_table: self.dec_table,
        }
    }
}

impl Default for Context {
    fn default() -> (r: Self)
        ensures
            r.is_fresh(),
    {
        Context {
            focus: FocusCtx::default(),
            search: String::new(),
            depth: 0,
            count: Counter::default(),
            open_popup: Trigger::default(),
            close_popup: Trigger::default(),
            inc_table: Trigger::default(),
            dec_table: Trigger::default(),
        }
    }
}

} // verus!
